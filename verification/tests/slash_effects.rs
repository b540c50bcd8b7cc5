use rs_agent::agent_events::on_text_delta;
use rs_agent::completion::{fixed_completion_effect, CompletionEffect};
use rs_agent::helpers::ChatMessage;
use rs_agent::keys::{default_keybindings, KeyMap};
use rs_agent::normal_keys::PickerMode;
use rs_agent::slash_command::SlashCommand;
use rs_agent::slash_state::{SlashAction, SlashState};
use rs_agent::theme::ThemeName;

fn row(role: &str, text: &str) -> ChatMessage {
    ChatMessage { role: role.to_string(), text: text.to_string(), thinking: None, show_thinking: false, tool_blocks: Vec::new() }
}

fn state() -> SlashState {
    SlashState {
        messages: vec![row("system", "banner"), row("user", "hi")],
        keys: KeyMap::new(default_keybindings()),
        input_history: vec!["first".to_string(), "second".to_string()],
        input: String::new(),
        history_index: Some(1),
        theme: ThemeName::Dark,
        context_enabled: true,
        session_title: None,
        show_timeline: false,
        show_repl: false,
        output_runs: 3,
        goal_indicator: "goal".to_string(),
        status: "ready".to_string(),
    }
}

fn last_text(st: &SlashState) -> String {
    st.messages.last().unwrap().text.clone()
}

#[test]
fn plain_text_is_not_a_command() {
    let mut st = state();
    assert!(st.handle_slash("hello there").is_none());
    assert_eq!(st.messages.len(), 2);
}

#[test]
fn unknown_commands_are_answered() {
    let mut st = state();
    let (cmd, act) = st.handle_slash("/frob x").unwrap();
    assert_eq!(cmd, SlashCommand::Unknown("/frob".to_string()));
    assert_eq!(act, SlashAction::Done);
    assert_eq!(last_text(&st), "Unknown command: /frob (try /help)");
    assert_eq!(st.messages.last().unwrap().role, "system");
}

#[test]
fn clear_keeps_the_banner_and_clears_the_goal() {
    let mut st = state();
    let (_, act) = st.handle_slash("/clear").unwrap();
    assert_eq!(act, SlashAction::GoalClear);
    assert_eq!(st.messages.len(), 2);
    assert_eq!(st.messages[0].text, "banner");
    assert_eq!(last_text(&st), "Chat cleared (session kept). Use /new for a fresh session.");
    assert_eq!(st.goal_indicator, "");
}

#[test]
fn rename_context_timeline_output_and_fork() {
    let mut st = state();
    assert_eq!(st.handle_slash("/rename").unwrap().1, SlashAction::Done);
    assert_eq!(last_text(&st), "Current title: (untitled)\nUsage: /rename <title>");
    assert_eq!(st.handle_slash("/rename  My run ").unwrap().1, SlashAction::SetTitle("My run".to_string()));
    assert_eq!(st.session_title, Some("My run".to_string()));
    assert_eq!(last_text(&st), "Session renamed to \"My run\"");
    assert_eq!(st.handle_slash("/context off").unwrap().1, SlashAction::RebuildPrompt);
    assert!(!st.context_enabled);
    assert_eq!(last_text(&st), "Project context inclusion: off. System prompt rebuilt.");
    assert_eq!(st.handle_slash("/context").unwrap().1, SlashAction::ListContext);
    assert_eq!(st.handle_slash("/timeline").unwrap().1, SlashAction::RequestTimeline);
    assert!(st.show_timeline);
    assert_eq!(st.handle_slash("/timeline").unwrap().1, SlashAction::Done);
    assert_eq!(last_text(&st), "Timeline panel hidden.");
    st.handle_slash("/output");
    assert!(st.show_repl);
    assert_eq!(last_text(&st), "Bottom console shown — 3 run(s). Tab / ↑↓ switch while waiting.");
    assert_eq!(
        st.handle_slash("/fork @2 alt").unwrap().1,
        SlashAction::Fork { at: Some(2), label: Some("alt".to_string()) }
    );
    assert_eq!(last_text(&st), "Forking session at API message @2…");
}

#[test]
fn history_theme_compact_and_delegated_commands() {
    let mut st = state();
    st.handle_slash("/history 1");
    assert_eq!(st.input, "first");
    assert_eq!(st.history_index, None);
    st.handle_slash("/theme");
    assert_eq!(last_text(&st), "Current theme: dark\nUsage: /theme dark|light|forest|auto");
    assert_eq!(st.handle_slash("/theme light").unwrap().1, SlashAction::SetTheme("light".to_string()));
    assert_eq!(st.handle_slash("/compact").unwrap().1, SlashAction::Compact);
    assert_eq!(st.status, "compacting...");
    let n = st.messages.len();
    assert_eq!(st.handle_slash("/mail").unwrap().1, SlashAction::Delegate);
    assert_eq!(st.messages.len(), n);
    assert_eq!(st.handle_slash("/export pdf").unwrap().1, SlashAction::Done);
    assert_eq!(last_text(&st), "Unknown export format `pdf`. Use /export [md|json|html]");
}

#[test]
fn text_delta_follows_the_bottom() {
    let mut rows = vec![row("user", "hi")];
    let mut follow = false;
    on_text_delta(&mut rows, &mut follow, "Hel");
    on_text_delta(&mut rows, &mut follow, "lo");
    assert!(follow);
    assert_eq!(rows.len(), 2);
    assert_eq!(rows[1].role, "assistant");
    assert_eq!(rows[1].text, "Hello");
}

#[test]
fn completing_mode_opens_the_picker() {
    match fixed_completion_effect("/mode a") {
        CompletionEffect::OpenPicker(p) => {
            assert_eq!(p.mode, PickerMode::Prompt);
            assert_eq!(p.prefix, "/mode ");
            assert_eq!(p.query, "a");
            assert_eq!(p.results, vec!["ask".to_string(), "agent".to_string(), "plan".to_string()]);
            assert_eq!(p.selection, 0);
        }
        _ => panic!("picker expected"),
    }
    match fixed_completion_effect("/theme fo") {
        CompletionEffect::SetInput(t) => assert_eq!(t, "/theme forest "),
        _ => panic!("completion expected"),
    }
    assert!(matches!(fixed_completion_effect("hello"), CompletionEffect::Nothing));
}

#[test]
fn theme_names_round_trip() {
    for t in [ThemeName::Dark, ThemeName::Light, ThemeName::Forest] {
        assert_eq!(ThemeName::parse_named(t.as_str()), Some(t));
    }
    assert_eq!(ThemeName::parse_named(" LIGHT "), Some(ThemeName::Light));
    assert_eq!(ThemeName::parse_named("Solarized"), Some(ThemeName::Dark));
    assert_eq!(ThemeName::parse_named(" Auto"), None);
}

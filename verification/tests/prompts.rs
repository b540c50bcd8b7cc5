use rs_agent::prompt::{diff_line_tone, permission_prompt_lines, permission_title, PromptLine, PromptTone};

fn line(tone: PromptTone, text: &str) -> PromptLine {
    PromptLine { tone, text: text.to_string() }
}

#[test]
fn permission_title_names_danger() {
    assert_eq!(permission_title(true), "blocked · dangerous");
    assert_eq!(permission_title(false), "blocked · permission");
}

#[test]
fn diff_lines_are_toned_by_their_marker() {
    assert_eq!(diff_line_tone("+added"), PromptTone::Added);
    assert_eq!(diff_line_tone("+++ b/file.rs"), PromptTone::Context);
    assert_eq!(diff_line_tone("-removed"), PromptTone::Removed);
    assert_eq!(diff_line_tone("--- a/file.rs"), PromptTone::Context);
    assert_eq!(diff_line_tone(" unchanged"), PromptTone::Context);
    assert_eq!(diff_line_tone(""), PromptTone::Context);
}

#[test]
fn permission_prompt_without_danger_or_diff() {
    let input = vec!["{".to_string(), "  \"cmd\": \"ls\"".to_string(), "}".to_string()];
    assert_eq!(
        permission_prompt_lines("bash", None, &input, None),
        vec![
            line(PromptTone::Title, " bash needs approval"),
            line(PromptTone::Body, ""),
            line(PromptTone::Body, " {"),
            line(PromptTone::Body, "   \"cmd\": \"ls\""),
            line(PromptTone::Body, " }"),
        ]
    );
}

#[test]
fn permission_prompt_with_danger_and_diff() {
    let input = vec!["x".to_string()];
    let diff = "--- a/f\n+++ b/f\n-old\n+new\n same";
    assert_eq!(
        permission_prompt_lines("edit", Some("writes outside project"), &input, Some(diff)),
        vec![
            line(PromptTone::Title, " edit needs approval"),
            line(PromptTone::Danger, " writes outside project"),
            line(PromptTone::Body, ""),
            line(PromptTone::Body, " x"),
            line(PromptTone::Body, ""),
            line(PromptTone::Heading, " Diff"),
            line(PromptTone::Context, " --- a/f"),
            line(PromptTone::Context, " +++ b/f"),
            line(PromptTone::Removed, " -old"),
            line(PromptTone::Added, " +new"),
            line(PromptTone::Context, "  same"),
        ]
    );
}

#[test]
fn permission_prompt_shows_at_most_24_diff_lines() {
    let diff: String = (0..30).map(|i| format!("+l{i}\n")).collect();
    let lines = permission_prompt_lines("edit", None, &vec![], Some(&diff));
    // title, blank, blank, heading, then the diff lines
    assert_eq!(lines.len(), 4 + 24);
    assert_eq!(lines[4], line(PromptTone::Added, " +l0"));
    assert_eq!(lines[27], line(PromptTone::Added, " +l23"));
}

use rs_agent::geometry::Rect;
use rs_agent::normal_keys::PickerMode;
use rs_agent::picker_view::{picker_area, picker_empty_hint, picker_title};

#[test]
fn picker_sits_above_the_input() {
    let area = Rect { x: 0, y: 0, width: 120, height: 40 };
    // 3 results: height 5, anchored 4 rows above the bottom
    assert_eq!(picker_area(area, 3, PickerMode::File), Rect { x: 1, y: 31, width: 72, height: 5 });
    // empty results still take one row for the hint
    assert_eq!(picker_area(area, 0, PickerMode::Dir), Rect { x: 1, y: 33, width: 72, height: 3 });
    // at most ten rows of results; providers are wider
    assert_eq!(picker_area(area, 50, PickerMode::Provider), Rect { x: 1, y: 24, width: 96, height: 12 });
}

#[test]
fn picker_narrows_and_clamps_in_small_areas() {
    let small = Rect { x: 2, y: 5, width: 40, height: 6 };
    assert_eq!(picker_area(small, 4, PickerMode::Model), Rect { x: 3, y: 5, width: 38, height: 6 });
    let tiny = Rect { x: 0, y: 0, width: 1, height: 1 };
    assert_eq!(picker_area(tiny, 1, PickerMode::Skill), Rect { x: 1, y: 0, width: 0, height: 3 });
    // the count is taken as a 16-bit number: 65537 results count as one row
    assert_eq!(picker_area(Rect { x: 0, y: 0, width: 80, height: 30 }, 65537, PickerMode::File).height, 3);
}

#[test]
fn picker_titles_and_hints() {
    assert_eq!(picker_title(PickerMode::File), "Files · Enter · Esc");
    assert_eq!(picker_title(PickerMode::Provider), "Providers · Enter connect · Esc");
    assert_eq!(picker_title(PickerMode::Prompt), "Templates");
    assert_eq!(picker_empty_hint(PickerMode::Dir), "(no directories found)");
    assert_eq!(picker_empty_hint(PickerMode::Model), "(no models — export API keys, or wait for fetch)");
}

use rs_agent::console::{console_panel, ToolOutputTab};

fn tab(label: &str, buffer: &str, done: bool) -> ToolOutputTab {
    ToolOutputTab { id: label.to_string(), name: "bash".to_string(), label: label.to_string(), buffer: buffer.to_string(), done }
}

#[test]
fn console_without_tabs_shows_the_shared_text() {
    let (title, lines) = console_panel(&vec![], 0, "one\ntwo\nthree\nfour", 30, 4);
    assert_eq!(title, "Console");
    // two rows inside the border: the last two lines
    assert_eq!(lines, vec!["three".to_string(), "four".to_string()]);
}

#[test]
fn console_title_names_tabs_and_marks_the_shown_one() {
    let tabs = vec![tab("a", "out a", true), tab("b", "", false)];
    let (title, lines) = console_panel(&tabs, 0, "shared", 60, 10);
    assert_eq!(title, "Console · Tab [✓a] ●b ");
    assert_eq!(lines, vec!["out a".to_string()]);
    // an empty tab buffer falls back to the shared text
    let (title, lines) = console_panel(&tabs, 1, "shared", 60, 10);
    assert_eq!(title, "Console · Tab  ✓a [●b]");
    assert_eq!(lines, vec!["shared".to_string()]);
}

#[test]
fn console_title_lists_six_tabs_then_an_ellipsis_and_fits_the_width() {
    let tabs: Vec<ToolOutputTab> = (0..8).map(|i| tab(&format!("t{i}"), "", false)).collect();
    let (title, _) = console_panel(&tabs, 9, "", 200, 10);
    assert_eq!(title, "Console · Tab  ●t0  ●t1  ●t2  ●t3  ●t4  ●t5 …");
    // inner width 18, title cut to 16 characters
    let (title, lines) = console_panel(&tabs, 9, "abcdefghijklmnopqrstuvwxyz", 20, 10);
    assert_eq!(title, "Console · Tab  …");
    assert_eq!(lines, vec!["abcdefghijklmnopq…".to_string()]);
}

use rs_agent::tree_lines::timeline_rows;

#[test]
fn timeline_rows_mark_the_selection() {
    assert_eq!(timeline_rows(&vec![], 0), vec![(false, "(empty — send a message)".to_string())]);
    let entries = vec![(0, "user: hi".to_string()), (12, "assistant: hello".to_string())];
    assert_eq!(
        timeline_rows(&entries, 1),
        vec![(false, "  @0 user: hi".to_string()), (true, "› @12 assistant: hello".to_string())]
    );
}

use rs_agent::prompt::{question_prompt_lines, QuestionLine};

#[test]
fn question_prompt_numbers_its_options() {
    assert_eq!(
        question_prompt_lines("Proceed?", &vec![]),
        vec![QuestionLine::Question(" Proceed?".to_string()), QuestionLine::Blank]
    );
    let opts = vec!["yes".to_string(), "no".to_string()];
    assert_eq!(
        question_prompt_lines("Deploy now?", &opts),
        vec![
            QuestionLine::Question(" Deploy now?".to_string()),
            QuestionLine::Blank,
            QuestionLine::Choice { badge: " 1 ".to_string(), text: " yes".to_string() },
            QuestionLine::Choice { badge: " 2 ".to_string(), text: " no".to_string() },
            QuestionLine::Blank,
        ]
    );
}

use rs_agent::markdown::markdown_events;

#[test]
fn markdown_events_follow_the_parse() {
    let evs = markdown_events("# Hi\n\nsome *x*");
    assert_eq!(
        format!("{:?}", evs),
        "[StartHeading(1), Text(\"Hi\"), EndHeading, StartParagraph, Text(\"some \"), StartEmphasis, Text(\"x\"), EndEmphasis, EndParagraph]"
    );
    assert!(markdown_events("").is_empty());
}

#[test]
fn markdown_paragraphs_are_separated_by_a_blank_line() {
    let lines = rs_agent::markdown::render_markdown("a\n\nb", "base16-ocean.dark");
    let texts: Vec<String> = lines.iter().map(|l| l.iter().map(|(t, _)| t.as_str()).collect::<String>()).collect();
    assert_eq!(texts, vec!["a".to_string(), "".to_string(), "b".to_string()]);
}

#[test]
fn code_blocks_highlight_with_an_unknown_theme_too() {
    let known = rs_agent::markdown::render_markdown("```rust\nlet x = 1;\n```", "base16-ocean.dark");
    let unknown = rs_agent::markdown::render_markdown("```rust\nlet x = 1;\n```", "no-such-theme");
    assert_eq!(format!("{:?}", known), format!("{:?}", unknown));
    assert!(!known.is_empty());
}

use rs_agent::markdown::{events_from_code_list, render_md_events};

fn codes(list: &[(u8, (u8, u32), u8, &str)]) -> Vec<(u8, (u8, u32), u8, String)> {
    list.iter().map(|(k, s, e, t)| (*k, *s, *e, t.to_string())).collect()
}

#[test]
fn parsed_codes_become_renderer_events() {
    let c = codes(&[
        (0, (1, 2), 9, ""),
        (2, (9, 0), 9, "Hi"),
        (1, (9, 0), 1, ""),
        (0, (3, 0), 9, "rust"),
        (1, (9, 0), 3, ""),
        (9, (9, 0), 9, ""),
        (10, (9, 0), 9, ""),
        (0, (9, 0), 9, ""),
        (4, (9, 0), 9, "x"),
    ]);
    let evs = events_from_code_list(&c);
    assert_eq!(
        format!("{:?}", evs),
        "[StartHeading(2), Text(\"Hi\"), EndHeading, StartCodeBlock(\"rust\"), EndCodeBlock, Break, Break, Other, Other]"
    );
}

#[test]
fn two_paragraph_codes_render_with_a_blank_line() {
    let c = codes(&[
        (0, (0, 0), 9, ""),
        (2, (9, 0), 9, "a"),
        (1, (9, 0), 0, ""),
        (0, (0, 0), 9, ""),
        (2, (9, 0), 9, "b"),
        (1, (9, 0), 0, ""),
    ]);
    let lines = render_md_events(&events_from_code_list(&c), "base16-ocean.dark");
    let texts: Vec<String> = lines.iter().map(|l| l.iter().map(|(t, _)| t.as_str()).collect::<String>()).collect();
    assert_eq!(texts, vec!["a".to_string(), "".to_string(), "b".to_string()]);
    assert_eq!(format!("{:?}", markdown_events("a\n\nb")), format!("{:?}", events_from_code_list(&c)));
}

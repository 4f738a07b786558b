use coding_agent::cli::{at_step, bold, cyan, dim, reference_end, skill_names, AgentHelper, RefTarget};
use coding_agent::stream::StreamEvent;
use coding_agent::tui::app::{App, KeyOutcome};
use coding_agent::tui::approval::ApprovalBar;
use coding_agent::tui::chat::ChatMessage;
use coding_agent::tui::footer::Footer;
use coding_agent::tui::header::Header;
use coding_agent::tui::input::Key;
use coding_agent::tui::markdown::{MarkdownRenderer, MdEvent};
use coding_agent::tui::messages::MessagesArea;
use coding_agent::tui::styled::{StyledSpan, Tint};
use coding_agent::tui::toast::{Toast, ToastManager};
use coding_agent::tui::tool_block::{ToolBlock, ToolState};
use std::time::Duration;

fn text_of(line: &[StyledSpan]) -> String {
    line.iter().map(|s| s.text.as_str()).collect()
}

fn all_text(lines: &[Vec<StyledSpan>]) -> String {
    lines.iter().map(|l| text_of(l)).collect::<Vec<_>>().join("\n")
}

#[test]
fn test_footer_render() {
    let mut f = Footer::new();
    f.set_directory("~/projects/app");
    f.set_status("Ready");
    f.set_model("gpt-4o");
    f.set_token_pct(55);
    let content = text_of(&f.line(80));
    assert!(content.contains("~/projects/app"), "should show directory: {content}");
    assert!(content.contains("Ready"), "should show status: {content}");
    assert!(content.contains("gpt-4o"), "should show model: {content}");
    assert!(content.contains("55%"), "should show token pct: {content}");
    assert!(content.contains("^C"), "should show keybinds: {content}");
}

#[test]
fn test_streaming_spinner() {
    let mut f = Footer::new();
    f.set_streaming(true);
    f.tick();
    let content = text_of(&f.line(40));
    assert!(
        content.contains('⠋') || content.contains('⠙') || content.contains('⠹')
            || content.contains('⠸') || content.contains('⠼') || content.contains('⠴')
            || content.contains('⠦') || content.contains('⠧') || content.contains('⠇')
            || content.contains('⠏'),
        "streaming should show braille spinner: {content}"
    );
}

#[test]
fn footer_fills_the_line_between_its_parts() {
    let mut f = Footer::new();
    f.set_model("m");
    let line = f.line(60);
    let text = text_of(&line);
    assert_eq!(text.chars().count(), 60);
    assert!(text.starts_with("Ready"));
    assert!(text.ends_with("m  0%  ^C quit ^H help"));
    assert_eq!(line[0].style.fg, Some(Tint::Gray));
    let narrow = text_of(&f.line(5));
    assert_eq!(narrow, "Readym  0%  ^C quit ^H help");
    f.set_status("Error: boom");
    assert_eq!(f.line(80)[0].style.fg, Some(Tint::Red));
}

#[test]
fn header_shows_brand_title_and_gauge() {
    let mut h = Header::new();
    h.set_model("gpt-4o");
    h.set_context_pct(85);
    let line = h.line(70);
    let text = text_of(&line);
    assert!(text.starts_with("◆ agent │ New Session  gpt-4o"));
    assert!(text.ends_with("▓▓▓▓▓▓▓▓░░ 85%"));
    assert_eq!(text.chars().count(), 70);
    let gauge = &line[line.len() - 2];
    assert_eq!(gauge.style.fg, Some(Tint::Yellow));
    h.set_context_pct(97);
    let line = h.line(10);
    assert_eq!(line[line.len() - 2].style.fg, Some(Tint::Red));
}

#[test]
fn approval_lines_mark_decisions_and_selection() {
    let mut bar = ApprovalBar::new();
    assert!(bar.lines(4).is_empty());
    bar.show(vec!["shell".to_string(), "file_write".to_string()]);
    bar.toggle_selected();
    bar.select_next();
    let lines = bar.lines(2);
    assert_eq!(lines.len(), 2);
    assert_eq!(text_of(&lines[0]), "✗ shell   ✓ file_write");
    assert!(!lines[0][0].style.underlined);
    assert!(lines[0][2].style.underlined && lines[0][2].style.bold);
    assert_eq!(text_of(&lines[1]), "space · ← → · enter confirm  esc reject all");
    assert!(bar.lines(1).is_empty());
}

#[test]
fn toast_boxes_stack_from_the_top_right() {
    let mut tm = ToastManager::new();
    tm.push(Toast::info("one"));
    tm.push(Toast::error("two"));
    tm.push(Toast::success("three"));
    let boxes = tm.boxes(0, 0, 100, 8);
    assert_eq!(boxes.len(), 2);
    assert_eq!((boxes[0].x, boxes[0].y, boxes[0].width, boxes[0].height), (39, 1, 60, 3));
    assert_eq!(boxes[1].y, 4);
    assert_eq!(boxes[0].title, "─ Info ");
    assert_eq!(boxes[1].title, "─ Error ");
    assert_eq!(boxes[1].border, Tint::Red);
    assert_eq!(boxes[1].message.text, "two");
    let narrow = tm.boxes(5, 2, 10, 20);
    assert_eq!(narrow.len(), 3);
    assert_eq!((narrow[0].x, narrow[0].width), (6, 8));
    assert_eq!(Toast::warning("w").border_color(), Tint::Yellow);
}

#[test]
fn test_render_collapsed() {
    let mut block = ToolBlock::new("file_read", "src/main.rs");
    block.collapsed = true;
    block.finish_ok("fn main() {}", Duration::from_millis(42));
    let content = text_of(&block.collapsed_line());
    assert!(content.contains("Read File"), "collapsed should show display name: {content}");
    assert_eq!(content, "▸ Read File: src/main.rs ✓ 0s");
}

#[test]
fn test_render_expanded() {
    let block = ToolBlock::new("shell", "echo hello");
    let frame = block.expanded_frame(58);
    let content = format!("{}{}", frame.title.text, all_text(&frame.lines));
    assert!(content.contains("Run Command"), "expanded should show display name: {content}");
    assert!(content.contains("echo hello"), "expanded should show arguments: {content}");
    assert_eq!(frame.footer.text, " ─ ⏳ ");
    assert_eq!(all_text(&frame.lines), "$ echo hello");
}

#[test]
fn expanded_frame_wraps_output_and_error() {
    let mut block = ToolBlock::new("grep", "x");
    block.finish_ok("abcdefgh", Duration::from_secs(75));
    block.finish_err("bad");
    let frame = block.expanded_frame(4);
    assert_eq!(all_text(&frame.lines), "$ x\nabcd\nefgh\nbad");
    assert_eq!(frame.lines[3][0].style.fg, Some(Tint::Red));
    assert_eq!(frame.border.fg, Some(Tint::Blue));
}

#[test]
fn markdown_headings_lists_and_code() {
    let r = MarkdownRenderer::new();
    let lines = r.render("# Title\n\nSome *em* and `code`.\n\n1. one\n2. two\n\n- dot\n\n---\n\n[site](http://x.y)");
    let text = all_text(&lines);
    let expected = format!("Title\n\nSome em and code.\n1. one\n2. two\n• dot\n{}\n[site](http://x.y)", "─".repeat(60));
    assert_eq!(text, expected);
    assert_eq!(lines[0][0].style.fg, Some(Tint::Cyan));
    assert!(lines[0][0].style.bold);
    let em = &lines[2][1];
    assert_eq!(em.text, "em");
    assert!(em.style.italic);
    assert_eq!(lines[2][3].style.fg, Some(Tint::LightGreen));
    assert!(r.render("").len() == 1 && r.render("")[0].is_empty());
}

#[test]
fn markdown_code_blocks_are_highlighted_by_line() {
    let r = MarkdownRenderer::new();
    let lines = r.render("```rust\nfn main() {}\nlet x = 1;\n```");
    assert_eq!(lines.len(), 2);
    assert_eq!(text_of(&lines[0]), "fn main() {}");
    assert_eq!(text_of(&lines[1]), "let x = 1;");
    assert!(lines[0].iter().all(|s| matches!(s.style.fg, Some(Tint::Rgb(_, _, _)))));
}

#[test]
fn markdown_events_render_without_parsing() {
    let r = MarkdownRenderer::new();
    let evs = vec![
        MdEvent::StartList(Some(7)),
        MdEvent::StartItem,
        MdEvent::Text("a".to_string()),
        MdEvent::EndItem,
        MdEvent::StartItem,
        MdEvent::StartStrong,
        MdEvent::Text("b".to_string()),
        MdEvent::EndStrong,
        MdEvent::SoftBreak,
        MdEvent::StartStrikethrough,
        MdEvent::Text("c".to_string()),
        MdEvent::EndItem,
        MdEvent::EndList,
        MdEvent::StartBlockQuote,
        MdEvent::Text("q".to_string()),
        MdEvent::EndBlockQuote,
    ];
    let lines = r.render_events(&evs);
    assert_eq!(all_text(&lines), "7. a\n8. b c\n│ q");
    assert!(lines[1][1].style.bold);
    assert!(lines[1][3].style.crossed_out);
}

#[test]
fn transcript_lines_for_each_kind_of_entry() {
    let mut m = MessagesArea::new();
    let empty = m.collect_lines(40);
    assert_eq!(all_text(&empty), "  Ready — type a message to begin.");
    m.push_user("hello there");
    m.push_assistant("**hi**");
    m.push_system("note");
    m.push_error("oops");
    let lines = m.collect_lines(11);
    assert_eq!(all_text(&lines), "┃ hello t\n  here\n  hi\n  note\n✗ oops");
    assert_eq!(lines[4][0].style.fg, Some(Tint::Red));
}

#[test]
fn transcript_tool_blocks_collapsed_and_expanded() {
    let mut m = MessagesArea::new();
    let mut block = ToolBlock::new("shell", "ls");
    block.collapsed = true;
    m.push_tool(block);
    m.push_tool(ToolBlock::new("file_read", "a.txt"));
    m.finish_last_tool("line", Duration::from_secs(3));
    let lines = m.collect_lines(40);
    let expected = format!("  ▶ run: ls ⏳\n  ┌─ ▷ read {}\n  │ a.txt\n  │ line\n  ╰── ✓ 3s ", "─".repeat(21));
    assert_eq!(all_text(&lines), expected);
    m.mark_last_tool_error("denied");
    m.update_last_tool_args("b.txt");
    let text = all_text(&m.collect_lines(40));
    assert!(text.contains("  │ b.txt\n  │ line\n  │ denied\n  ╰── ✗ "));
    match &m.messages()[1] {
        ChatMessage::ToolCall(b) => assert!(matches!(b.state, ToolState::Error(ref e) if e == "denied")),
        _ => panic!("expected a tool call"),
    }
}

#[test]
fn transcript_text_accumulates_and_scrolls() {
    let mut m = MessagesArea::new();
    m.append_to_last("Hel");
    assert!(m.last_is_assistant());
    m.append_to_last("lo");
    assert_eq!(m.messages().len(), 1);
    assert!(matches!(&m.messages()[0], ChatMessage::Assistant(t) if t == "Hello"));
    m.push_user("a\nb\nc\nd");
    assert_eq!(m.visible_range(10, 4), (6, 10));
    m.scroll_up(3);
    assert_eq!(m.visible_range(10, 4), (3, 7));
    m.scroll_up(100);
    assert_eq!(m.visible_range(10, 4), (0, 4));
    m.scroll_down(100);
    assert_eq!(m.visible_range(10, 4), (3, 7));
    m.scroll_down(3);
    assert_eq!(m.visible_range(10, 4), (6, 10));
    m.scroll_up(2);
    m.scroll_up(5);
    m.scroll_down(5);
    assert_eq!(m.visible_range(10, 4), (4, 8));
    let shown = m.visible_lines(20, 2);
    assert_eq!(shown.len(), 2);
    m.clear();
    assert!(m.messages().is_empty());
    assert_eq!(m.visible_range(3, 10), (0, 3));
}

#[test]
fn input_line_edits_by_characters() {
    let mut app = App::new("gpt-4o", "/tmp");
    for c in "héllo".chars() {
        assert!(app.accepts_key(Key::Char(c, false)));
        assert!(matches!(app.handle_key(Key::Char(c, false)), KeyOutcome::Continue));
    }
    assert_eq!(app.input, "héllo");
    assert_eq!(app.input_cursor, 6);
    app.handle_key(Key::Left);
    app.handle_key(Key::Left);
    app.handle_key(Key::Left);
    app.handle_key(Key::Left);
    assert_eq!(app.input_cursor, 1);
    app.handle_key(Key::Delete);
    assert_eq!(app.input, "hllo");
    app.handle_key(Key::Char('e', false));
    app.handle_key(Key::Backspace);
    assert_eq!(app.input, "hllo");
    assert_eq!(app.input_cursor, 1);
    app.handle_key(Key::Right);
    assert_eq!(app.input_cursor, 2);
    app.handle_key(Key::End);
    assert_eq!(app.input_cursor, 4);
    app.handle_key(Key::Home);
    assert_eq!(app.input_cursor, 0);
    app.handle_key(Key::Backspace);
    assert_eq!(app.input, "hllo");
    app.input_cursor = 2;
    let spans = app.input_line();
    assert_eq!(text_of(&spans), "> hl▏lo");
    match app.handle_key(Key::Enter) {
        KeyOutcome::Submit(s) => assert_eq!(s, "hllo"),
        other => panic!("unexpected {:?}", other),
    }
    assert!(app.input.is_empty() && app.input_cursor == 0);
    assert!(matches!(app.handle_key(Key::Enter), KeyOutcome::Continue));
    assert!(matches!(app.handle_key(Key::Char('c', true)), KeyOutcome::Quit));
}

#[test]
fn keys_refused_inside_a_character() {
    let mut app = App::new("m", "/");
    app.input = "é".to_string();
    app.input_cursor = 1;
    assert!(!app.accepts_key(Key::Char('x', false)));
    assert!(!app.accepts_key(Key::Backspace));
    assert!(app.accepts_key(Key::Home));
    app.input_cursor = 5;
    assert!(app.accepts_key(Key::Delete));
    app.handle_key(Key::Delete);
    assert_eq!(app.input, "é");
}

#[test]
fn keys_go_to_the_approval_bar_when_shown() {
    let mut app = App::new("m", "/");
    app.approval.show(vec!["shell".to_string(), "grep".to_string()]);
    app.handle_key(Key::Right);
    app.handle_key(Key::Char(' ', false));
    assert_eq!(app.approval.confirm(), vec![true, false]);
    assert!(app.input.is_empty());
    app.handle_key(Key::Esc);
    assert!(!app.approval.is_visible());
    assert_eq!(app.approval.confirm(), vec![false, false]);
    app.handle_key(Key::PageUp);
    assert_eq!(app.approval_height(), 0);
}

#[test]
fn commands_in_the_interface() {
    let mut app = App::new("gpt-4o", "/");
    app.handle_command("/help");
    app.handle_command("  /model extra");
    app.handle_command("/frobnicate now");
    let text = all_text(&app.messages.collect_lines(200));
    assert!(text.contains("Commands: /help /model /skills /clear /quit /sessions /new /mcp"));
    assert!(text.contains("Model: gpt-4o"));
    assert!(text.contains("Command '/frobnicate' not yet supported in TUI mode"));
    app.handle_command("/clear");
    assert!(app.messages.messages().is_empty());
    app.handle_command("/exit");
    assert!(!app.running);
}

#[test]
fn a_streamed_turn_in_the_interface() {
    let mut app = App::new("m", "/");
    app.begin_turn("hi");
    assert_eq!(app.status, "Thinking...");
    assert!(app.spinner.is_running());
    let mut response = String::new();
    let mut snaps = Vec::new();
    let events = vec![
        StreamEvent::Token("Hel".to_string()),
        StreamEvent::Token("lo".to_string()),
        StreamEvent::ToolCallStart { id: "1".to_string(), name: "ls".to_string() },
        StreamEvent::ToolSnapshot { path: "a".to_string(), content: "old".to_string() },
        StreamEvent::Token("!".to_string()),
        StreamEvent::Error("lost".to_string()),
    ];
    let mut stopped_at = None;
    for (i, ev) in events.iter().enumerate() {
        if app.on_stream_event(ev, &mut response, &mut snaps) {
            stopped_at = Some(i);
            break;
        }
    }
    assert_eq!(stopped_at, Some(5));
    assert_eq!(response, "Hello!");
    assert_eq!(snaps, vec![("a".to_string(), "old".to_string())]);
    assert_eq!(app.messages.messages().len(), 5);
    assert!(app.on_stream_event(&StreamEvent::Done, &mut response, &mut snaps));
    app.end_turn();
    assert_eq!(app.status, "Ready");
    assert!(!app.spinner.is_running());
    app.note_changes("a", "x\n", "x\n");
    assert_eq!(app.messages.messages().len(), 5);
    app.note_changes("a", "x\n", "y\n");
    match &app.messages.messages()[5] {
        ChatMessage::System(t) => assert!(t.starts_with("Changes in a:\n--- a/a\n+++ b/a\n")),
        _ => panic!("expected a notice"),
    }
}

#[test]
fn tick_moves_header_and_footer() {
    let mut app = App::new("m", "/");
    app.tick();
    assert_eq!(app.footer.status, "Ready");
    assert!(!app.footer.streaming);
    app.spinner.start();
    app.status = "Working".to_string();
    app.tick();
    assert!(app.footer.streaming);
    assert!(app.footer.status.ends_with(" Working"));
}

#[test]
fn colours_wrap_text() {
    assert_eq!(bold("a"), "\x1b[1ma\x1b[0m");
    assert_eq!(cyan("b"), "\x1b[1;36mb\x1b[0m");
    assert_eq!(dim(""), "\x1b[2m\x1b[0m");
}

#[test]
fn references_expand_step_by_step() {
    let cs: Vec<char> = "see @a.txt and @ x".chars().collect();
    assert_eq!(reference_end(&cs, 4), Some(10));
    assert_eq!(reference_end(&cs, 15), None);
    assert_eq!(reference_end(&cs, 0), None);
    let (t, next) = at_step(&cs, 4, Some(RefTarget::File("a.txt".to_string(), "body".to_string())));
    assert_eq!(t, "[File: a.txt]\nbody\n[End File]\n");
    assert_eq!(next, 10);
    let (t, next) = at_step(&cs, 4, Some(RefTarget::Unreadable("denied".to_string())));
    assert_eq!((t.as_str(), next), ("[Error reading a.txt: denied]", 10));
    let dir = RefTarget::Dir(vec![("src".to_string(), true), (".git".to_string(), true), ("b.rs".to_string(), false)]);
    let (t, _) = at_step(&cs, 4, Some(dir));
    assert_eq!(t, "[Directory: a.txt]\nsrc/\nb.rs\n[End Directory]\n");
    let (t, next) = at_step(&cs, 4, Some(RefTarget::Missing));
    assert_eq!((t.as_str(), next), ("@", 5));
    let (t, next) = at_step(&cs, 0, None);
    assert_eq!((t.as_str(), next), ("s", 1));
}

#[test]
fn completion_of_commands_skills_and_paths() {
    let h = AgentHelper::new(vec!["review".to_string(), "refactor".to_string(), "test".to_string()]);
    let (start, c) = h.complete("/se", 3, &vec![]);
    assert_eq!(start, 0);
    let shown: Vec<&str> = c.iter().map(|p| p.0.as_str()).collect();
    assert_eq!(shown, vec!["/sessions", "/session"]);
    let (start, c) = h.complete("héllo @sr", 10, &vec![("src".to_string(), true), ("tests".to_string(), true)]);
    assert_eq!(start, 7);
    assert_eq!(AgentHelper::dir_to_list("héllo @sr", 10), Some(".".to_string()));
    assert_eq!(c, vec![("@src/".to_string(), "@src/".to_string())]);
    assert_eq!(AgentHelper::dir_to_list("@src/ma", 7), Some("src/".to_string()));
    let (_, c) = h.complete("@src/ma", 7, &vec![("main.rs".to_string(), false), ("lib.rs".to_string(), false)]);
    assert_eq!(c, vec![("@src/main.rs".to_string(), "@src/main.rs".to_string())]);
    let (_, c) = h.complete("word", 4, &vec![]);
    assert!(c.is_empty());
    assert_eq!(h.hint("/mo", 3), Some("del".to_string()));
    assert_eq!(h.hint("/model", 6), None);
    assert_eq!(h.hint("x /he", 5), Some("lp".to_string()));
    assert_eq!(h.hint("", 0), None);
    assert_eq!(AgentHelper::highlight("/quit"), "\x1b[1;33m/quit\x1b[0m");
    assert_eq!(AgentHelper::highlight("see @a"), "\x1b[1;36msee @a\x1b[0m");
    assert_eq!(AgentHelper::highlight("plain"), "plain");
    assert_eq!(AgentHelper::highlight_hint("x"), "\x1b[2mx\x1b[0m");
}

#[test]
fn skill_names_are_sorted_once_without_hidden() {
    let found = vec!["zeta".to_string(), ".cache".to_string(), "alpha".to_string(), "zeta".to_string(), "beta".to_string()];
    assert_eq!(skill_names(found), vec!["alpha".to_string(), "beta".to_string(), "zeta".to_string()]);
}

#[test]
fn paste_appends_and_moves_cursor_to_end() {
    let mut app = App::new("m", "/");
    app.paste("héllo");
    assert_eq!(app.input, "héllo");
    assert_eq!(app.input_cursor, "héllo".len());
    app.paste(" x");
    assert_eq!(app.input, "héllo x");
    assert_eq!(app.input_cursor, 8);
}

#[test]
fn markdown_indented_and_unknown_code_blocks_show_as_plain_text() {
    let r = MarkdownRenderer::new();
    let indented = r.render("para\n\n    let x = 1;\n");
    assert!(indented.iter().any(|l| text_of(l) == "let x = 1;"));
    let unknown = r.render("```nosuchlanguage\nsome code\n```");
    assert_eq!(unknown.len(), 1);
    assert_eq!(text_of(&unknown[0]), "some code");
    let evs = vec![
        MdEvent::StartCodeBlock(None),
        MdEvent::Text("x\n".to_string()),
        MdEvent::EndCodeBlock,
    ];
    let lines = r.render_events(&evs);
    assert_eq!(lines.len(), 1);
    assert_eq!(text_of(&lines[0]), "x");
}

use std::time::Duration;

use coding_agent::tui::approval::{ApprovalBar, ApprovalStatus};
use coding_agent::tui::footer::{fill_width, Footer};
use coding_agent::tui::header::{truncate_str, Header};
use coding_agent::tui::line_buffer::LineBuffer;
use coding_agent::tui::spinner::{fmt_secs, Spinner};
use coding_agent::tui::toast::{Toast, ToastKind, ToastManager};
use coding_agent::tui::tool_block::{
    family_glyph, family_label, tool_display_name, tool_family_for_name, truncate_chars,
    wrap_text, ToolBlock, ToolFamily, ToolState,
};

#[test]
fn test_basic_push_and_take() {
    let mut lb = LineBuffer::new();
    lb.push("hello\nworld\n");
    let committed = lb.take_committable();
    assert_eq!(committed, "hello\nworld\n");
    assert_eq!(lb.pending_text(), "");
}

#[test]
fn test_partial_line_held_back() {
    let mut lb = LineBuffer::new();
    lb.push("hello\nwor");
    let committed = lb.take_committable();
    assert_eq!(committed, "hello\n");
    assert_eq!(lb.pending_text(), "wor");
}

#[test]
fn test_no_newline_returns_empty() {
    let mut lb = LineBuffer::new();
    lb.push("hello world");
    let committed = lb.take_committable();
    assert!(committed.is_empty());
    assert_eq!(lb.pending_text(), "hello world");
}

#[test]
fn test_flush_drains_all() {
    let mut lb = LineBuffer::new();
    lb.push("partial");
    let remaining = lb.flush();
    assert_eq!(remaining, "partial");
    assert!(!lb.has_pending());
}

#[test]
fn test_multiple_pushes_accumulate() {
    let mut lb = LineBuffer::new();
    lb.push("hel");
    lb.push("lo\nwor");
    lb.push("ld\n");
    let committed = lb.take_committable();
    assert_eq!(committed, "hello\nworld\n");
}

#[test]
fn line_buffer_taken_and_pending_make_the_whole() {
    let mut lb = LineBuffer::new();
    lb.push("a\nb\nc");
    let taken = lb.take_committable();
    assert_eq!(format!("{}{}", taken, lb.pending_text()), "a\nb\nc");
    assert!(!lb.pending_text().contains('\n'));
    lb.push("");
    assert_eq!(lb.pending_text(), "c");
}

#[test]
fn test_tool_family_mapping() {
    assert_eq!(tool_family_for_name("file_read"), ToolFamily::Read);
    assert_eq!(tool_family_for_name("ls"), ToolFamily::Read);
    assert_eq!(tool_family_for_name("file_write"), ToolFamily::Patch);
    assert_eq!(tool_family_for_name("file_edit"), ToolFamily::Patch);
    assert_eq!(tool_family_for_name("shell"), ToolFamily::Run);
    assert_eq!(tool_family_for_name("git_commit"), ToolFamily::Run);
    assert_eq!(tool_family_for_name("git_diff"), ToolFamily::Run);
    assert_eq!(tool_family_for_name("git_status"), ToolFamily::Run);
    assert_eq!(tool_family_for_name("grep"), ToolFamily::Find);
    assert_eq!(tool_family_for_name("glob"), ToolFamily::Find);
    assert_eq!(tool_family_for_name("web_search"), ToolFamily::Find);
    assert_eq!(tool_family_for_name("unknown"), ToolFamily::Generic);
}

#[test]
fn test_family_glyph() {
    assert_eq!(family_glyph(ToolFamily::Read), "▷");
    assert_eq!(family_glyph(ToolFamily::Patch), "◆");
    assert_eq!(family_glyph(ToolFamily::Run), "▶");
    assert_eq!(family_glyph(ToolFamily::Find), "⌕");
    assert_eq!(family_glyph(ToolFamily::Delegate), "◐");
    assert_eq!(family_glyph(ToolFamily::Think), "…");
    assert_eq!(family_glyph(ToolFamily::Generic), "•");
}

#[test]
fn test_family_label() {
    assert_eq!(family_label(ToolFamily::Read), "read");
    assert_eq!(family_label(ToolFamily::Patch), "patch");
    assert_eq!(family_label(ToolFamily::Run), "run");
    assert_eq!(family_label(ToolFamily::Find), "find");
    assert_eq!(family_label(ToolFamily::Delegate), "delegate");
    assert_eq!(family_label(ToolFamily::Think), "think");
    assert_eq!(family_label(ToolFamily::Generic), "tool");
}

#[test]
fn test_tool_block_new() {
    let block = ToolBlock::new("shell", "ls -la");
    assert_eq!(block.name, "shell");
    assert_eq!(block.arguments, "ls -la");
    assert!(block.output.is_empty());
    assert!(matches!(block.state, ToolState::Running));
    assert!(!block.collapsed);
}

#[test]
fn test_tool_block_finish_ok() {
    let mut block = ToolBlock::new("shell", "echo hi");
    let dur = Duration::from_millis(150);
    block.finish_ok("hi\n", dur);
    assert_eq!(block.output, "hi\n");
    assert!(matches!(block.state, ToolState::Success(d) if d == dur));
}

#[test]
fn test_tool_block_finish_err() {
    let mut block = ToolBlock::new("shell", "bad");
    block.finish_err("command not found");
    assert!(matches!(block.state, ToolState::Error(ref e) if e == "command not found"));
}

#[test]
fn tool_block_toggle_twice_restores() {
    let mut block = ToolBlock::new("grep", "x");
    block.toggle_collapse();
    assert!(block.collapsed);
    block.toggle_collapse();
    assert!(!block.collapsed);
}

#[test]
fn tool_block_status_suffix() {
    let mut block = ToolBlock::new("shell", "x");
    assert_eq!(block.status_suffix(), " ⏳");
    block.finish_ok("", Duration::from_secs(75));
    assert_eq!(block.status_suffix(), " ✓ 1m 15s");
    block.finish_err("boom");
    assert_eq!(block.status_suffix(), " ✗");
}

#[test]
fn display_names_of_tools() {
    assert_eq!(tool_display_name("file_read"), "Read File");
    assert_eq!(tool_display_name("web_search"), "Web Search");
    assert_eq!(tool_display_name("my_tool"), "my_tool");
}

#[test]
fn wrap_text_keeps_short_lines_and_cuts_long_ones() {
    assert_eq!(wrap_text("abc\ndefgh", 4), vec!["abc", "defg", "h"]);
    assert_eq!(wrap_text("abc", 0), vec!["abc"]);
    assert_eq!(wrap_text("", 10), vec![""]);
    assert_eq!(wrap_text("你好世界", 4), vec!["你好", "世界"]);
}

#[test]
fn truncate_chars_marks_cut() {
    assert_eq!(truncate_chars("hello", 10), "hello");
    assert_eq!(truncate_chars("hello world", 6), "hello…");
    assert_eq!(truncate_chars("abc", 0), "…");
}

#[test]
fn elapsed_text_formats() {
    assert_eq!(fmt_secs(42), "42s");
    assert_eq!(fmt_secs(187), "3m 07s");
    assert_eq!(fmt_secs(7509), "2h 05m 09s");
}

#[test]
fn spinner_stopped_shows_nothing() {
    let mut s = Spinner::new("thinking");
    assert!(!s.is_running());
    assert_eq!(s.tick(), "");
    assert_eq!(s.render_line(), "");
    s.start();
    assert!(s.is_running());
    let f = s.tick();
    assert!(f == "⠋" || f == "⠙");
    assert!(s.render_line().contains("thinking"));
    s.stop();
    assert_eq!(s.render_line(), "");
}

#[test]
fn toast_manager_keeps_five_newest() {
    let mut m = ToastManager::new();
    for i in 0..7 {
        m.push(Toast::info(&format!("t{}", i)));
    }
    assert_eq!(m.toasts().len(), 5);
    assert_eq!(m.toasts()[0].message, "t2");
    assert_eq!(m.toasts()[4].message, "t6");
}

#[test]
fn toast_expiry_and_kinds() {
    let t = Toast::error("bad");
    assert_eq!(t.kind, ToastKind::Error);
    assert!(!t.is_expired_at(5999));
    assert!(t.is_expired_at(6000));
    let w = Toast::warning("careful");
    assert_eq!(w.kind, ToastKind::Warning);
    assert!(w.is_expired_at(4000));
    assert!(!Toast::success("ok").is_expired());
    let mut m = ToastManager::new();
    m.push(Toast::info("a"));
    m.push(Toast::info("b"));
    m.push(Toast::info("c"));
    m.remove_expired(&vec![true, false]);
    assert_eq!(m.toasts().len(), 2);
    assert_eq!(m.toasts()[0].message, "b");
    m.tick();
    assert_eq!(m.toasts().len(), 2);
}

#[test]
fn approval_bar_selection_and_decisions() {
    let mut bar = ApprovalBar::new();
    assert!(!bar.is_visible());
    bar.show(vec!["shell".to_string(), "file_write".to_string()]);
    assert!(bar.is_visible());
    assert_eq!(bar.confirm(), vec![true, true]);
    bar.select_next();
    bar.select_next();
    assert_eq!(bar.selected(), 1);
    bar.toggle_selected();
    assert_eq!(bar.confirm(), vec![true, false]);
    assert_eq!(bar.actions()[1].status, ApprovalStatus::Rejected);
    bar.toggle_selected();
    assert_eq!(bar.confirm(), vec![true, true]);
    bar.select_prev();
    bar.select_prev();
    assert_eq!(bar.selected(), 0);
    bar.hide_bar();
    assert!(!bar.is_visible());
    bar.reject_all();
    assert_eq!(bar.confirm(), vec![false, false]);
}

#[test]
fn test_truncate_left() {
    let f = Footer::new();
    let result = f.truncate_left("/very/long/path/to/project", 12);
    assert!(result.starts_with('…'), "should start with ellipsis: {result}");
    assert!(result.len() <= 12 || result.chars().count() <= 12);
}

#[test]
fn footer_state() {
    let mut f = Footer::new();
    assert_eq!(f.status, "Ready");
    f.set_token_pct(250);
    assert_eq!(f.token_pct, 100);
    f.set_status("Error: x");
    assert!(f.status_is_error());
    for _ in 0..300 {
        f.tick();
    }
    assert_eq!(f.spinner_frame(), "⠼");
    assert_eq!(f.truncate_left("short", 25), "short");
    assert_eq!(f.truncate_left("abcdef", 4), "…def");
    assert_eq!(fill_width(10, 20, 80), 50);
    assert_eq!(fill_width(50, 40, 80), 0);
}

#[test]
fn header_state() {
    let mut h = Header::new();
    assert_eq!(h.session_title, "New Session");
    h.set_context_pct(45);
    let (bar, label) = h.context_bar();
    assert_eq!(bar, "▓▓▓▓░░░░░░");
    assert_eq!(label, " 45%");
    h.set_context_pct(200);
    assert_eq!(h.context_pct, 100);
    assert_eq!(truncate_str("hello world", 5), "hello…");
    assert_eq!(truncate_str("hi", 5), "hi");
}

#[test]
fn spinner_advances_only_after_a_frame_interval() {
    let mut s = Spinner::new("Working");
    assert_eq!(s.advance(500), ("", false));
    s.start();
    assert_eq!(s.advance(79), ("⠋", false));
    assert_eq!(s.advance(80), ("⠙", true));
    assert_eq!(s.advance(0), ("⠙", false));
    for _ in 0..10 {
        s.advance(100);
    }
    assert_eq!(s.advance(0).0, "⠙");
}

#[test]
fn truncate_left_to_no_width() {
    let f = Footer::new();
    assert_eq!(f.truncate_left("", 0), "");
    assert_eq!(f.truncate_left("ab", 1), "…");
}

#[test]
fn line_buffer_loses_nothing() {
    let mut lb = LineBuffer::new();
    let mut taken = String::new();
    lb.push("first li");
    taken.push_str(&lb.take_committable());
    lb.push("ne\nsecond\nthi");
    taken.push_str(&lb.take_committable());
    lb.push("rd");
    taken.push_str(&lb.take_committable());
    taken.push_str(&lb.flush());
    assert_eq!(taken, "first line\nsecond\nthird");
    assert!(!lb.has_pending());
    assert_eq!(lb.pending_text(), "");
}

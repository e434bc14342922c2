use rnk::color::Color;
use rnk::measure::{
    display_width, measure_text, measure_text_width, pad_text, truncate_middle, truncate_start,
    truncate_text, wrap_text, TextAlign,
};
use rnk::output::{border_cells, content_clip, text_origin, BorderCell, BorderSide, BorderSides, ClipRegion, Output, StyledChar, TextStyle};
use rnk::scroll::ScrollState;
use rnk::terminal::{
    cursor_down, cursor_to, cursor_to_column, cursor_up, erase_end_of_line, erase_line,
    erase_lines, hide_cursor, restore_cursor, save_cursor, show_cursor, Terminal,
};
use rnk::text::trim_end;

fn scroll_state() -> ScrollState {
    let mut state = ScrollState::new();
    state.set_content_size(100, 50);
    state.set_viewport_size(80, 10);
    state
}

#[test]
fn test_scroll_state_basic() {
    let state = scroll_state();
    assert_eq!(state.offset_y, 0);
    assert_eq!(state.max_offset_y(), 40);
}

#[test]
fn test_scroll_down() {
    let mut state = scroll_state();
    state.scroll_down(5);
    assert_eq!(state.offset_y, 5);

    state.scroll_down(100);
    assert_eq!(state.offset_y, 40);
}

#[test]
fn test_scroll_up() {
    let mut state = scroll_state();
    state.scroll_down(20);
    state.scroll_up(5);
    assert_eq!(state.offset_y, 15);

    state.scroll_up(100);
    assert_eq!(state.offset_y, 0);
}

#[test]
fn test_page_navigation() {
    let mut state = scroll_state();
    state.page_down();
    assert_eq!(state.offset_y, 10);

    state.page_up();
    assert_eq!(state.offset_y, 0);
}

#[test]
fn test_scroll_to_item() {
    let mut state = scroll_state();
    state.scroll_to_item(15);
    assert_eq!(state.offset_y, 6);

    state.scroll_to_item(3);
    assert_eq!(state.offset_y, 3);
}

#[test]
fn test_visible_range() {
    let mut state = scroll_state();
    state.scroll_down(5);
    let (start, end) = state.visible_range();
    assert_eq!(start, 5);
    assert_eq!(end, 15);
}

#[test]
fn test_can_scroll() {
    let mut state = scroll_state();
    assert!(!state.can_scroll_up());
    assert!(state.can_scroll_down());

    state.scroll_to_bottom();
    assert!(state.can_scroll_up());
    assert!(!state.can_scroll_down());
}

#[test]
fn scroll_down_then_up_returns() {
    let mut state = scroll_state();
    state.scroll_down(7);
    let before = state;
    state.scroll_down(12);
    state.scroll_up(12);
    assert_eq!(state, before);
}

#[test]
fn horizontal_scrolling_and_shrinking_content() {
    let mut state = scroll_state();
    state.scroll_right(50);
    assert_eq!(state.offset_x, 20);
    assert!(!state.can_scroll_right());
    state.scroll_left(5);
    assert_eq!(state.offset_x, 15);
    assert!(state.can_scroll_left());
    state.scroll_to_y(30);
    state.set_content_size(10, 12);
    assert_eq!(state.offset_x, 0);
    assert_eq!(state.offset_y, 2);
    state.scroll_to_top();
    assert_eq!(state.offset_y, 0);
    assert_eq!(ScrollState::with_viewport(3, 4).viewport_height, 4);
    assert_eq!(ScrollState::default(), ScrollState::new());
}

#[test]
fn test_measure_ascii() {
    assert_eq!(measure_text_width("hello"), 5);
    assert_eq!(measure_text_width("hello world"), 11);
}

#[test]
fn test_measure_unicode() {
    assert_eq!(measure_text_width("你好"), 4);
    assert_eq!(measure_text_width("Hello 世界"), 10);
}

#[test]
fn test_measure_text_dimensions() {
    let (w, h) = measure_text("hello\nworld");
    assert_eq!(w, 5);
    assert_eq!(h, 2);
}

#[test]
fn measure_empty_and_ragged() {
    assert_eq!(measure_text(""), (0, 1));
    assert_eq!(measure_text("a\nlonger\n"), (6, 2));
    assert_eq!(display_width("你"), 2);
}

#[test]
fn test_wrap_text() {
    let wrapped = wrap_text("hello world", 6);
    assert!(wrapped.contains('\n'));
}

#[test]
fn wrap_text_exact() {
    assert_eq!(wrap_text("hello world", 6), "hello \nworld");
    assert_eq!(wrap_text("abc", 0), "");
}

#[test]
fn test_truncate_text() {
    let truncated = truncate_text("hello world", 8, "...");
    assert_eq!(truncated, "hello...");
}

#[test]
fn test_truncate_start() {
    let truncated = truncate_start("hello world", 8, "...");
    assert_eq!(truncated, "...world");
}

#[test]
fn test_truncate_middle() {
    let truncated = truncate_middle("hello world", 9, "...");
    assert_eq!(truncated, "hel...rld");
}

#[test]
fn truncation_edge_cases() {
    assert_eq!(truncate_text("short", 10, "..."), "short");
    assert_eq!(truncate_text("hello world", 2, "..."), "..");
    assert_eq!(truncate_start("hello world", 3, "..."), "...");
    assert_eq!(truncate_text("你好世界", 5, "…"), "你好…");
}

#[test]
fn test_pad_text() {
    assert_eq!(pad_text("hi", 5, TextAlign::Left), "hi   ");
    assert_eq!(pad_text("hi", 5, TextAlign::Right), "   hi");
    assert_eq!(pad_text("hi", 5, TextAlign::Center), " hi  ");
}

#[test]
fn pad_text_already_wide() {
    assert_eq!(pad_text("hello", 3, TextAlign::Center), "hello");
    assert_eq!(pad_text("你", 4, TextAlign::Left), "你  ");
}

#[test]
fn test_truncate_preserves_graphemes() {
    let text = "hello 你好";
    let truncated = truncate_text(text, 8, "…");
    assert!(measure_text_width(&truncated) <= 8);
}

#[test]
fn test_zero_width_characters() {
    let zwj = "\u{200D}";
    assert_eq!(measure_text_width(zwj), 0);
}

#[test]
fn test_output_creation() {
    let output = Output::new(80, 24);
    assert_eq!(output.width(), 80);
    assert_eq!(output.height(), 24);
}

#[test]
fn test_write_text() {
    let mut output = Output::new(80, 24);
    output.write(0, 0, "Hello", &TextStyle::default());

    assert_eq!(output.cell(0, 0).unwrap().ch, 'H');
    assert_eq!(output.cell(0, 4).unwrap().ch, 'o');
}

#[test]
fn test_styled_output() {
    let mut output = Output::new(80, 24);
    let mut style = TextStyle::default();
    style.color = Some(Color::Green);
    style.bold = true;

    output.write(0, 0, "Test", &style);

    let rendered = output.render();
    assert!(rendered.contains("\x1b["));
}

#[test]
fn test_wide_char_placeholder() {
    let mut output = Output::new(80, 24);
    output.write(0, 0, "你好", &TextStyle::default());

    assert_eq!(output.cell(0, 0).unwrap().ch, '你');
    assert_eq!(output.cell(0, 1).unwrap().ch, '\0');
    assert_eq!(output.cell(0, 2).unwrap().ch, '好');
    assert_eq!(output.cell(0, 3).unwrap().ch, '\0');
}

#[test]
fn test_overwrite_wide_char_placeholder() {
    let mut output = Output::new(80, 24);
    output.write(0, 0, "你", &TextStyle::default());
    assert_eq!(output.cell(0, 0).unwrap().ch, '你');
    assert_eq!(output.cell(0, 1).unwrap().ch, '\0');

    output.write_char(1, 0, 'X', &TextStyle::default());

    assert_eq!(output.cell(0, 0).unwrap().ch, ' ');
    assert_eq!(output.cell(0, 1).unwrap().ch, 'X');
}

#[test]
fn test_overwrite_wide_char_first_half() {
    let mut output = Output::new(80, 24);
    output.write(0, 0, "你", &TextStyle::default());
    assert_eq!(output.cell(0, 0).unwrap().ch, '你');
    assert_eq!(output.cell(0, 1).unwrap().ch, '\0');

    output.write_char(0, 0, 'X', &TextStyle::default());

    assert_eq!(output.cell(0, 0).unwrap().ch, 'X');
    assert_eq!(output.cell(0, 1).unwrap().ch, ' ');
}

#[test]
fn test_wide_char_render_no_duplicate() {
    let mut output = Output::new(80, 24);
    output.write(0, 0, "你好世界", &TextStyle::default());

    let rendered = output.render();
    assert_eq!(rendered, "你好世界");
}

#[test]
fn test_raw_mode_line_endings() {
    let mut output = Output::new(40, 5);
    output.write(0, 0, "Line 1", &TextStyle::default());
    output.write(0, 1, "Line 2", &TextStyle::default());
    output.write(0, 2, "Line 3", &TextStyle::default());

    let rendered = output.render();

    assert!(rendered.contains("\r\n"), "Output must use CRLF line endings for raw mode");

    let lines: Vec<&str> = rendered.split("\r\n").collect();
    assert!(lines.len() >= 3, "Should have at least 3 lines");

    for line in &lines {
        assert!(!line.contains('\n'), "Should not have standalone LF within lines");
    }
}

#[test]
fn test_line_alignment_in_output() {
    let mut output = Output::new(20, 3);
    output.write(0, 0, "AAAA", &TextStyle::default());
    output.write(0, 1, "BBBB", &TextStyle::default());
    output.write(0, 2, "CCCC", &TextStyle::default());

    let rendered = output.render();
    let lines: Vec<&str> = rendered.split("\r\n").collect();

    assert_eq!(lines[0], "AAAA");
    assert_eq!(lines[1], "BBBB");
    assert_eq!(lines[2], "CCCC");
}

#[test]
fn test_wide_char_at_boundary() {
    let mut output = Output::new(5, 1);
    output.write(3, 0, "你", &TextStyle::default());

    assert_eq!(output.cell(0, 3).unwrap().ch, '你');
    assert_eq!(output.cell(0, 4).unwrap().ch, '\0');

    let mut output2 = Output::new(5, 1);
    output2.write(4, 0, "你", &TextStyle::default());

    assert_eq!(output2.cell(0, 4).unwrap().ch, ' ');
}

#[test]
fn test_wide_char_at_exact_boundary() {
    let mut output = Output::new(4, 1);
    output.write(2, 0, "你", &TextStyle::default());

    assert_eq!(output.cell(0, 2).unwrap().ch, '你');
    assert_eq!(output.cell(0, 3).unwrap().ch, '\0');
}

#[test]
fn output_styles_clips_and_fills() {
    let mut output = Output::new(6, 2);
    let mut bold = TextStyle::default();
    bold.bold = true;
    output.write(0, 0, "ab", &bold);
    assert_eq!(output.render(), "\x1b[1mab\x1b[0m");
    output.clip(ClipRegion { x1: 1, y1: 0, x2: 3, y2: 2 });
    output.fill_rect(0, 1, 6, 1, '#', &TextStyle::default());
    output.unclip();
    assert_eq!(output.cell(1, 0).unwrap().ch, ' ');
    assert_eq!(output.cell(1, 1).unwrap().ch, '#');
    assert_eq!(output.cell(1, 2).unwrap().ch, '#');
    assert_eq!(output.cell(1, 3).unwrap().ch, ' ');
    assert_eq!(output.cell(5, 0), None);
    assert_eq!(output.render(), "\x1b[1mab\x1b[0m\r\n ##");
    let c = StyledChar::new('x');
    assert!(!c.has_style());
    assert!(StyledChar::with_style('x', &bold).has_style());
}

#[test]
fn output_write_stops_at_line_feed_and_edge() {
    let mut output = Output::new(3, 1);
    output.write(1, 0, "xy\nz", &TextStyle::default());
    assert_eq!(output.render(), " xy");
    output.write(2, 0, "long", &TextStyle::default());
    assert_eq!(output.render(), " xl");
    output.write(0, 5, "below", &TextStyle::default());
    assert_eq!(output.render(), " xl");
}

#[test]
fn test_ansi_codes() {
    assert_eq!(cursor_to(0, 0), "\x1b[1;1H");
    assert_eq!(cursor_to(5, 10), "\x1b[6;11H");
    assert_eq!(cursor_up(3), "\x1b[3A");
    assert_eq!(erase_line(), "\x1b[2K");
}

#[test]
fn more_ansi_codes() {
    assert_eq!(cursor_down(2), "\x1b[2B");
    assert_eq!(cursor_to_column(0), "\x1b[1G");
    assert_eq!(erase_end_of_line(), "\x1b[K");
    assert_eq!(hide_cursor(), "\x1b[?25l");
    assert_eq!(show_cursor(), "\x1b[?25h");
    assert_eq!(save_cursor(), "\x1b[s");
    assert_eq!(restore_cursor(), "\x1b[u");
    assert_eq!(erase_lines(0), "");
}

#[test]
fn inline_frames() {
    let mut t = Terminal::new();
    assert_eq!(t.render("a\nb"), "\x1b[1G\x1b[2Ka\r\n\x1b[1G\x1b[2Kb");
    assert_eq!(t.previous_line_count(), 2);
    assert_eq!(t.render("c"), "\x1b[1A\x1b[1G\x1b[2Kc\r\n\x1b[1G\x1b[2K\x1b[1A");
    assert_eq!(t.previous_line_count(), 1);
}

#[test]
fn fullscreen_frames_redraw_only_changes() {
    let mut t = Terminal::new();
    t.set_alternate_screen(true);
    assert_eq!(t.render("a\nb"), "\x1b[1;1H\x1b[1;1H\x1b[2Ka\x1b[2;1H\x1b[2Kb");
    assert_eq!(t.render("a\nc"), "\x1b[1;1H\x1b[2;1H\x1b[2Kc");
    assert_eq!(t.render("a\nc"), "\x1b[1;1H");
    assert_eq!(t.render("a"), "\x1b[1;1H\x1b[2;1H\x1b[2K");
}

#[test]
fn trim_end_removes_unicode_white_space() {
    assert_eq!(trim_end("done \t\n\u{3000}"), "done");
    assert_eq!(trim_end("  lead"), "  lead");
    assert_eq!(trim_end(""), "");
    for s in ["a \u{85}", "x\u{200b} ", "\u{2029}"] {
        assert_eq!(trim_end(s), s.trim_end());
    }
}

#[test]
fn border_cells_of_a_small_box() {
    let all = BorderSides { top: true, bottom: true, left: true, right: true };
    let chars = ('┌', '┐', '└', '┘', '─', '│');
    let cell = |x: u16, y: u16, ch: char, side: BorderSide| BorderCell { x, y, ch, side };
    assert_eq!(
        border_cells(0, 0, 4, 3, all, chars),
        vec![
            cell(0, 0, '┌', BorderSide::Top),
            cell(1, 0, '─', BorderSide::Top),
            cell(2, 0, '─', BorderSide::Top),
            cell(3, 0, '┐', BorderSide::Top),
            cell(0, 2, '└', BorderSide::Bottom),
            cell(1, 2, '─', BorderSide::Bottom),
            cell(2, 2, '─', BorderSide::Bottom),
            cell(3, 2, '┘', BorderSide::Bottom),
            cell(0, 1, '│', BorderSide::Left),
            cell(3, 1, '│', BorderSide::Right),
        ]
    );
    let top_only = BorderSides { top: true, bottom: false, left: false, right: false };
    assert_eq!(border_cells(5, 1, 1, 1, top_only, chars), vec![cell(5, 1, '┌', BorderSide::Top)]);
    let none = BorderSides { top: false, bottom: false, left: false, right: false };
    assert!(border_cells(0, 0, 0, 0, none, chars).is_empty());
}

#[test]
fn text_color_reaches_only_uncolored_parts() {
    let plain = TextStyle::default();
    let red = plain.or_color(Color::Red);
    assert_eq!(red.color, Some(Color::Red));
    assert_eq!(red.or_color(Color::Blue).color, Some(Color::Red));
    let on_blue = plain.or_background(Color::Blue).or_background(Color::Green);
    assert_eq!(on_blue.background_color, Some(Color::Blue));
    assert_eq!(on_blue.color, None);
}

#[test]
fn single_span_style_merges_into_text() {
    let text = TextStyle { color: Some(Color::Green), italic: true, ..TextStyle::default() };
    let span = TextStyle { color: Some(Color::Red), bold: true, ..TextStyle::default() };
    let merged = text.with_span(span);
    assert_eq!(merged.color, Some(Color::Red));
    assert!(merged.bold && merged.italic);
    assert!(!merged.underline);
    assert_eq!(text.with_span(TextStyle::default()), text);
    let uncolored_span = TextStyle { dim: true, ..TextStyle::default() };
    assert_eq!(text.with_span(uncolored_span).color, Some(Color::Green));
}

#[test]
fn wrapping_only_adds_line_breaks() {
    for (text, width) in [("hello world", 5usize), ("ab\ncdef", 2), ("日本語テキスト", 3), ("", 4)] {
        let wrapped = wrap_text(text, width);
        let strip = |s: &str| s.chars().filter(|c| *c != '\n').collect::<String>();
        assert_eq!(strip(&wrapped), strip(text));
    }
    assert_eq!(wrap_text("hello world", 5), "hello\n worl\nd");
}

#[test]
fn box_text_origin_and_clip() {
    assert_eq!(text_origin(2, 3, true, 1, 0), (4, 4));
    assert_eq!(text_origin(2, 3, false, 0, 2), (2, 5));
    assert_eq!(content_clip(2, 3, 10, 5, true, true), Some(ClipRegion { x1: 3, y1: 4, x2: 11, y2: 7 }));
    assert_eq!(content_clip(2, 3, 10, 5, false, true), Some(ClipRegion { x1: 2, y1: 3, x2: 12, y2: 8 }));
    assert_eq!(content_clip(2, 3, 10, 5, true, false), None);
    assert_eq!(content_clip(0, 0, 2, 5, true, true), None);
}

#[test]
fn border_of_an_empty_box_away_from_the_origin() {
    let all = BorderSides { top: true, bottom: true, left: true, right: true };
    let chars = ('┌', '┐', '└', '┘', '─', '│');
    let cell = |x: u16, y: u16, ch: char, side: BorderSide| BorderCell { x, y, ch, side };
    // No columns: only the left corners of the edges.
    assert_eq!(
        border_cells(3, 2, 0, 2, all, chars),
        vec![cell(3, 2, '┌', BorderSide::Top), cell(3, 3, '└', BorderSide::Bottom)]
    );
    // No rows: nothing, not even the sides.
    assert!(border_cells(3, 2, 4, 0, all, chars).is_empty());
    // No side drawn: the box may end past the grid's range.
    let none = BorderSides { top: false, bottom: false, left: false, right: false };
    assert!(border_cells(u16::MAX, u16::MAX, 5, 5, none, chars).is_empty());
}

fn no_orphaned_placeholder(out: &Output) -> bool {
    for r in 0..out.height() as usize {
        for c in 0..out.width() as usize {
            if out.cell(r, c).unwrap().ch == '\0' {
                if c == 0 || display_width(&out.cell(r, c - 1).unwrap().ch.to_string()) != 2 {
                    return false;
                }
            }
        }
    }
    true
}

#[test]
fn overlapping_writes_leave_no_orphaned_placeholder() {
    let style = TextStyle::default();
    let mut out = Output::new(5, 1);
    out.write(0, 0, "你好", &style);
    assert!(no_orphaned_placeholder(&out));
    out.write_char(1, 0, 'x', &style);
    assert!(no_orphaned_placeholder(&out));
    out.write(2, 0, "世界", &style);
    assert!(no_orphaned_placeholder(&out));
    out.write_char(4, 0, '好', &style);
    assert!(no_orphaned_placeholder(&out));
    out.fill_rect(0, 0, 3, 1, '字', &style);
    assert!(no_orphaned_placeholder(&out));
    // Each wide character breaks the one before it: only the last stays.
    assert_eq!(out.cell(0, 0).unwrap().ch, ' ');
    assert_eq!(out.cell(0, 1).unwrap().ch, ' ');
    assert_eq!(out.cell(0, 2).unwrap().ch, '字');
    assert_eq!(out.cell(0, 3).unwrap().ch, '\0');
}

use rnk::color::Color;
use rnk::list::{highlight_prefix, visible_rows, Constraint, ListState, TableState};
use rnk::style::JustifyContent;
use rnk::widgets::{
    next_frame, spinner_line,
    dialog_button_color, dialog_button_text, DialogState, ModalAlign, Newline, ProgressParts,
    ProgressSymbols, ScrollbarSymbols,
};

#[test]
fn test_list_state_navigation() {
    let mut state = ListState::new();

    state.select_next(5);
    assert_eq!(state.selected, Some(0));

    state.select_next(5);
    assert_eq!(state.selected, Some(1));

    state.select_previous(5);
    assert_eq!(state.selected, Some(0));

    state.select_previous(5);
    assert_eq!(state.selected, Some(0));
}

#[test]
fn test_list_state_first_last() {
    let mut state = ListState::new();

    state.select_last(10);
    assert_eq!(state.selected, Some(9));

    state.select_first(10);
    assert_eq!(state.selected, Some(0));
}

#[test]
fn test_scroll_to_selected() {
    let mut state = ListState::with_selected(Some(15));
    state.scroll_to_selected(10);
    assert_eq!(state.offset, 6);
}

#[test]
fn list_selection_edges() {
    let mut state = ListState::with_selected(Some(4));
    state.select_next(5);
    assert_eq!(state.selected, Some(4));
    state.select_next(0);
    assert_eq!(state.selected, None);
    state.select_first(0);
    assert_eq!(state.selected, None);
    let mut above = ListState { selected: Some(2), offset: 5 };
    above.scroll_to_selected(3);
    assert_eq!(above.offset, 2);
    let mut inside = ListState { selected: Some(6), offset: 5 };
    inside.scroll_to_selected(3);
    assert_eq!(inside.offset, 5);
    assert_eq!(ListState::default(), ListState::new());
}

#[test]
fn visible_rows_window_and_selection() {
    let state = ListState { selected: Some(3), offset: 2 };
    assert_eq!(visible_rows(10, &state, Some(3), true), vec![(2, false), (3, true), (4, false)]);
    assert_eq!(visible_rows(4, &state, Some(3), true), vec![(2, false), (3, true)]);
    assert_eq!(visible_rows(4, &state, Some(3), false), vec![(2, false), (3, false)]);
    assert_eq!(visible_rows(2, &state, None, true), vec![]);
    let top = ListState::new();
    assert_eq!(visible_rows(2, &top, None, true), vec![(0, false), (1, false)]);
}

#[test]
fn highlight_prefix_pads_by_bytes() {
    assert_eq!(highlight_prefix("> ", true), "> ");
    assert_eq!(highlight_prefix("> ", false), "  ");
    assert_eq!(highlight_prefix("▶", false), "   ");
}

#[test]
fn test_table_state() {
    let mut state = TableState::new();

    state.select_next(5);
    assert_eq!(state.selected, Some(0));

    state.select_next(5);
    assert_eq!(state.selected, Some(1));

    state.select_previous(5);
    assert_eq!(state.selected, Some(0));
}

#[test]
fn constraint_default_is_min_one() {
    assert_eq!(Constraint::default(), Constraint::Min(1));
    assert_eq!(TableState::default(), TableState::new());
}

#[test]
fn test_dialog_state() {
    let mut state = DialogState::new();

    assert!(!state.visible);
    assert!(state.is_confirm_focused());

    state.show();
    assert!(state.visible);

    state.focus_next();
    assert!(state.is_cancel_focused());

    state.focus_previous();
    assert!(state.is_confirm_focused());

    state.hide_dialog();
    assert!(!state.visible);
}

#[test]
fn dialog_toggle_and_wrap() {
    let mut state = DialogState::default();
    state.toggle();
    assert!(state.visible);
    state.toggle();
    assert!(!state.visible);
    state.focus_next();
    state.focus_next();
    assert!(state.is_confirm_focused());
    state.focus_previous();
    assert!(state.is_cancel_focused());
}

#[test]
fn dialog_buttons() {
    assert_eq!(dialog_button_text("OK"), "[ OK ]");
    assert_eq!(dialog_button_text(""), "[  ]");
    assert_eq!(dialog_button_color(Some(Color::Green), true, Some(Color::Cyan)), Some(Color::Cyan));
    assert_eq!(dialog_button_color(Some(Color::Green), false, Some(Color::Cyan)), Some(Color::Green));
    assert_eq!(dialog_button_color(Some(Color::Red), true, None), Some(Color::Red));
}

#[test]
fn test_modal_alignment() {
    assert_eq!(ModalAlign::Top.justify(), JustifyContent::FlexStart);
    assert_eq!(ModalAlign::Center.justify(), JustifyContent::Center);
    assert_eq!(ModalAlign::Bottom.justify(), JustifyContent::FlexEnd);
    assert_eq!(ModalAlign::default(), ModalAlign::Center);
}

#[test]
fn test_newline_single() {
    let element_text = Some(Newline::new().text_content());
    assert_eq!(element_text, Some("\n".to_string()));
}

#[test]
fn test_newline_multiple() {
    let element_text = Some(Newline::new().count(3).text_content());
    assert_eq!(element_text, Some("\n\n\n".to_string()));
    assert_eq!(Newline::new().count(3).get_count(), 3);
}

#[test]
fn test_progress_symbols() {
    let block = ProgressSymbols::block();
    assert_eq!(block.filled, '█');

    let ascii = ProgressSymbols::ascii();
    assert_eq!(ascii.filled, '#');
}

#[test]
fn progress_layout() {
    let block = ProgressSymbols::block();
    assert_eq!(
        block.parts(22, 10),
        ProgressParts { bar_width: 20, filled: 10, head: false, empty: 10 }
    );
    let line = ProgressSymbols::line();
    assert_eq!(line.head, Some('╸'));
    assert_eq!(line.parts(10, 4), ProgressParts { bar_width: 10, filled: 3, head: true, empty: 6 });
    assert_eq!(line.parts(10, 10), ProgressParts { bar_width: 10, filled: 10, head: false, empty: 0 });
    assert_eq!(block.parts(1, 0), ProgressParts { bar_width: 0, filled: 0, head: false, empty: 0 });
}

#[test]
fn test_scrollbar_symbols() {
    let vertical = ScrollbarSymbols::vertical();
    assert_eq!(vertical.track, '│');

    let horizontal = ScrollbarSymbols::horizontal();
    assert_eq!(horizontal.track, '─');

    let block = ScrollbarSymbols::block();
    assert_eq!(block.track, '░');
}

#[test]
fn scrollbar_cells() {
    let v = ScrollbarSymbols::vertical();
    assert_eq!(v.track_length(10), 8);
    assert_eq!(v.track_length(1), 0);
    assert_eq!(ScrollbarSymbols::thumb_extent(0, 8), (1, 7));
    assert_eq!(ScrollbarSymbols::thumb_extent(12, 8), (8, 0));
    assert_eq!(ScrollbarSymbols::thumb_extent(3, 8), (3, 5));
    let cells = v.cells(4, 1, 2);
    assert_eq!(
        cells,
        vec![('▲', false), ('│', false), ('█', true), ('█', true), ('│', false), ('▼', false)]
    );
}

#[test]
fn spinner_frames() {
    assert_eq!(spinner_line("⠋", "Loading...", false), "\x1b[2K\r\x1b[33m⠋ Loading...\x1b[0m");
    assert_eq!(
        spinner_line("-", "Wait", true),
        "\x1b[2K\r\x1b[33m- Wait \x1b[2m(ESC to cancel)\x1b[0m\x1b[0m"
    );
    assert_eq!(next_frame(0, 10), 1);
    assert_eq!(next_frame(9, 10), 0);
}

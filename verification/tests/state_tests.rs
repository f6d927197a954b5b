use cmux_win::terminal::parser::VtAction;
use cmux_win::terminal::state::{Cursor, TerminalState, TextAttrs};

fn row_text(t: &TerminalState, row: usize) -> String {
    t.buffer.lines[row].iter().map(|c| c.char.clone()).collect()
}

fn csi(t: &mut TerminalState, params: &[&[u16]], action: char) {
    let params: Vec<Vec<u16>> = params.iter().map(|p| p.to_vec()).collect();
    t.csi_dispatch(&params, &[], false, action);
}

#[test]
fn new_state_defaults() {
    let t = TerminalState::new(80, 24);
    assert_eq!(t.cursor, Cursor { row: 0, col: 0, visible: true });
    assert_eq!(t.saved_cursor, Cursor::default());
    assert_eq!(t.attrs, TextAttrs::default());
    assert_eq!((t.scroll_top, t.scroll_bottom), (0, 23));
    assert_eq!(t.buffer.lines.len(), 24);
}

#[test]
fn to_flags_sets_one_bit_per_style() {
    let mut a = TextAttrs::default();
    assert_eq!(a.to_flags(), 0);
    a.bold = true;
    a.underline = true;
    assert_eq!(a.to_flags(), 5);
    a.italic = true;
    a.inverse = true;
    a.strikethrough = true;
    assert_eq!(a.to_flags(), 31);
}

#[test]
fn process_input_prints_text() {
    let mut t = TerminalState::new(10, 3);
    t.process_input(b"hi");
    assert_eq!(row_text(&t, 0), "hi        ");
    assert_eq!(t.cursor.col, 2);
}

#[test]
fn process_input_handles_newline_and_return() {
    let mut t = TerminalState::new(10, 3);
    t.process_input(b"ab\r\ncd");
    assert_eq!(row_text(&t, 0), "ab        ");
    assert_eq!(row_text(&t, 1), "cd        ");
    assert_eq!((t.cursor.row, t.cursor.col), (1, 2));
}

#[test]
fn process_input_wraps_at_last_column() {
    let mut t = TerminalState::new(3, 2);
    t.process_input(b"abcd");
    assert_eq!(row_text(&t, 0), "abc");
    assert_eq!(row_text(&t, 1), "d  ");
    assert_eq!((t.cursor.row, t.cursor.col), (1, 1));
}

#[test]
fn line_feed_at_bottom_scrolls() {
    let mut t = TerminalState::new(3, 2);
    t.process_input(b"a\r\nb\r\nc");
    assert_eq!(row_text(&t, 0), "b  ");
    assert_eq!(row_text(&t, 1), "c  ");
    assert_eq!(t.buffer.scrollback.len(), 1);
    assert_eq!(t.buffer.scrollback[0][0].char, "a");
}

#[test]
fn escape_sequences_split_across_chunks() {
    let mut t = TerminalState::new(10, 5);
    t.process_input(b"\x1b[3");
    t.process_input(b";4H");
    assert_eq!((t.cursor.row, t.cursor.col), (2, 3));
}

#[test]
fn sgr_colours_and_styles_reach_cells() {
    let mut t = TerminalState::new(10, 2);
    t.process_input(b"\x1b[1;31;44mX\x1b[0mY");
    let x = &t.buffer.lines[0][0];
    assert_eq!((x.char.as_str(), x.fg, x.bg, x.flags), ("X", 1, 4, 1));
    let y = &t.buffer.lines[0][1];
    assert_eq!((y.fg, y.bg, y.flags), (0, 0, 0));
}

#[test]
fn sgr_extended_and_bright_colours() {
    let mut t = TerminalState::new(10, 2);
    csi(&mut t, &[&[38], &[5], &[200]], 'm');
    assert_eq!(t.attrs.fg, 200);
    csi(&mut t, &[&[48], &[5], &[17]], 'm');
    assert_eq!(t.attrs.bg, 17);
    csi(&mut t, &[&[95], &[103]], 'm');
    assert_eq!((t.attrs.fg, t.attrs.bg), (13, 11));
    csi(&mut t, &[&[39], &[49]], 'm');
    assert_eq!((t.attrs.fg, t.attrs.bg), (7, 0));
    csi(&mut t, &[&[38], &[2], &[9]], 'm');
    assert_eq!(t.attrs.fg, 7);
    csi(&mut t, &[&[3], &[4], &[7], &[9]], 'm');
    assert!(t.attrs.italic && t.attrs.underline && t.attrs.inverse && t.attrs.strikethrough);
    csi(&mut t, &[&[23], &[24], &[27], &[29], &[22]], 'm');
    assert_eq!(t.attrs, TextAttrs { fg: 7, bg: 0, ..TextAttrs::default() });
}

#[test]
fn sgr_reset_law_example() {
    let mut t = TerminalState::new(4, 2);
    csi(&mut t, &[&[1], &[33], &[41]], 'm');
    csi(&mut t, &[&[0]], 'm');
    assert_eq!(t.attrs, TextAttrs::default());
}

#[test]
fn cursor_movements_clamp() {
    let mut t = TerminalState::new(10, 5);
    csi(&mut t, &[&[3]], 'B');
    assert_eq!(t.cursor.row, 3);
    csi(&mut t, &[&[9]], 'B');
    assert_eq!(t.cursor.row, 4);
    csi(&mut t, &[&[2]], 'A');
    assert_eq!(t.cursor.row, 2);
    csi(&mut t, &[&[9]], 'A');
    assert_eq!(t.cursor.row, 0);
    csi(&mut t, &[], 'C');
    assert_eq!(t.cursor.col, 1);
    csi(&mut t, &[&[50]], 'C');
    assert_eq!(t.cursor.col, 9);
    csi(&mut t, &[&[4]], 'D');
    assert_eq!(t.cursor.col, 5);
    csi(&mut t, &[&[40], &[40]], 'H');
    assert_eq!((t.cursor.row, t.cursor.col), (4, 9));
    csi(&mut t, &[], 'f');
    assert_eq!((t.cursor.row, t.cursor.col), (0, 0));
}

#[test]
fn erase_in_line_and_display() {
    let mut t = TerminalState::new(4, 3);
    t.process_input(b"abcd");
    t.process_input(b"efgh");
    t.process_input(b"ij");
    csi(&mut t, &[&[2], &[2]], 'H');
    csi(&mut t, &[], 'K');
    assert_eq!(row_text(&t, 1), "e   ");
    csi(&mut t, &[&[2]], 'K');
    assert_eq!(row_text(&t, 1), "    ");
    assert_eq!(row_text(&t, 2), "ij  ");
    csi(&mut t, &[&[1], &[3]], 'H');
    csi(&mut t, &[&[0]], 'J');
    assert_eq!(row_text(&t, 0), "ab  ");
    assert_eq!(row_text(&t, 2), "    ");
    csi(&mut t, &[&[2]], 'J');
    assert_eq!(row_text(&t, 0), "    ");
    assert_eq!((t.cursor.row, t.cursor.col), (0, 2));
}

#[test]
fn save_and_restore_cursor() {
    let mut t = TerminalState::new(10, 5);
    csi(&mut t, &[&[2], &[3]], 'H');
    csi(&mut t, &[], 's');
    csi(&mut t, &[&[5], &[5]], 'H');
    csi(&mut t, &[], 'u');
    assert_eq!((t.cursor.row, t.cursor.col), (1, 2));
}

#[test]
fn scroll_region_sets_bottom_and_homes() {
    let mut t = TerminalState::new(10, 5);
    csi(&mut t, &[&[3], &[3]], 'H');
    csi(&mut t, &[&[2], &[4]], 'r');
    assert_eq!((t.scroll_top, t.scroll_bottom), (1, 3));
    assert_eq!((t.cursor.row, t.cursor.col), (0, 0));
    csi(&mut t, &[], 'r');
    assert_eq!((t.scroll_top, t.scroll_bottom), (0, 4));
}

#[test]
fn controls_tab_backspace() {
    let mut t = TerminalState::new(20, 2);
    t.execute(0x09);
    assert_eq!(t.cursor.col, 8);
    t.execute(0x09);
    assert_eq!(t.cursor.col, 16);
    t.execute(0x09);
    assert_eq!(t.cursor.col, 19);
    t.execute(0x08);
    assert_eq!(t.cursor.col, 18);
    t.execute(0x0D);
    assert_eq!(t.cursor.col, 0);
    t.execute(0x08);
    assert_eq!(t.cursor.col, 0);
    t.execute(0x07);
    t.execute(0x7F);
    assert_eq!((t.cursor.row, t.cursor.col), (0, 0));
    t.execute(0x0B);
    assert_eq!(t.cursor.row, 1);
}

#[test]
fn perform_matches_direct_calls() {
    let mut t = TerminalState::new(5, 2);
    t.perform(&VtAction::Print('q'));
    t.perform(&VtAction::Execute(0x0A));
    t.perform(&VtAction::CsiDispatch { params: vec![vec![1], vec![1]], intermediates: vec![], ignore: false, action: 'H' });
    t.perform(&VtAction::OscDispatch { parts: vec![b"0".to_vec(), b"title".to_vec()], bell_terminated: true });
    assert_eq!(t.buffer.lines[0][0].char, "q");
    assert_eq!((t.cursor.row, t.cursor.col), (0, 0));
}

#[test]
fn resize_clamps_cursor() {
    let mut t = TerminalState::new(10, 10);
    csi(&mut t, &[&[9], &[9]], 'H');
    t.resize(4, 3);
    assert_eq!((t.cursor.row, t.cursor.col), (2, 3));
    assert_eq!(t.scroll_bottom, 2);
    assert_eq!(t.buffer.lines.len(), 3);
    assert!(t.buffer.lines.iter().all(|l| l.len() == 4));
}

#[test]
fn zero_parameter_cursor_position_homes() {
    let mut t = TerminalState::new(10, 5);
    csi(&mut t, &[&[3], &[3]], 'H');
    csi(&mut t, &[&[0], &[0]], 'H');
    assert_eq!((t.cursor.row, t.cursor.col), (0, 0));
}

#[test]
fn bare_cursor_position_sequence_homes() {
    let mut t = TerminalState::new(10, 5);
    t.process_input(b"\x1b[4;4H\x1b[H");
    assert_eq!((t.cursor.row, t.cursor.col), (0, 0));
}

#[test]
fn huge_cursor_down_clamps_to_last_row() {
    let mut t = TerminalState::new(80, 24);
    csi(&mut t, &[&[6], &[1]], 'H');
    csi(&mut t, &[&[65535]], 'B');
    assert_eq!(t.cursor.row, 23);
    csi(&mut t, &[&[65535]], 'C');
    assert_eq!(t.cursor.col, 79);
}

#[test]
fn zero_parameter_scroll_region_is_whole_screen() {
    let mut t = TerminalState::new(10, 5);
    csi(&mut t, &[&[0], &[0]], 'r');
    assert_eq!((t.scroll_top, t.scroll_bottom), (0, 4));
}

#[test]
fn utf8_characters_print() {
    let mut t = TerminalState::new(4, 1);
    t.process_input("é€".as_bytes());
    assert_eq!(t.buffer.lines[0][0].char, "é");
    assert_eq!(t.buffer.lines[0][1].char, "€");
}

#[test]
fn output_split_anywhere_gives_the_same_screen() {
    let data: &[u8] = b"ab\x1b[1;31mc\r\nd\x1b[2;2H\xc3\xa9\x1b[Kz";
    let mut whole = TerminalState::new(6, 3);
    whole.process_input(data);
    for cut in 0..=data.len() {
        let mut split = TerminalState::new(6, 3);
        split.process_input(&data[..cut]);
        split.process_input(&data[cut..]);
        for r in 0..3 {
            assert_eq!(row_text(&split, r), row_text(&whole, r));
        }
        assert_eq!(split.cursor, whole.cursor);
        assert_eq!(split.attrs, whole.attrs);
    }
}

#[test]
fn restore_after_many_sequences_brings_back_saved_cursor() {
    let mut t = TerminalState::new(10, 5);
    t.process_input(b"\x1b[2;3H\x1b[s");
    t.process_input(b"xy\x1b[4;8H\x1b[1mz\x1b[2A\x1b[K\x1b[2;4r\r\n");
    let attrs = t.attrs;
    let (top, bottom) = (t.scroll_top, t.scroll_bottom);
    let rows: Vec<String> = (0..5).map(|r| row_text(&t, r)).collect();
    t.process_input(b"\x1b[u");
    assert_eq!((t.cursor.row, t.cursor.col), (1, 2));
    assert_eq!(t.attrs, attrs);
    assert_eq!((t.scroll_top, t.scroll_bottom), (top, bottom));
    for r in 0..5 {
        assert_eq!(row_text(&t, r), rows[r]);
    }
}

#[test]
fn restore_after_many_csi_calls() {
    let mut t = TerminalState::new(20, 10);
    csi(&mut t, &[&[4], &[7]], 'H');
    csi(&mut t, &[], 's');
    let calls: Vec<(Vec<Vec<u16>>, char)> = vec![
        (vec![vec![3]], 'B'),
        (vec![vec![2]], 'C'),
        (vec![vec![9], vec![1]], 'f'),
        (vec![vec![1], vec![31]], 'm'),
        (vec![vec![2]], 'J'),
        (vec![vec![2], vec![5]], 'r'),
        (vec![vec![1]], 'A'),
        (vec![], 'u'),
        (vec![vec![5]], 'D'),
    ];
    for (p, a) in &calls {
        t.csi_dispatch(p, &[], false, *a);
    }
    let attrs = t.attrs;
    let (top, bottom) = (t.scroll_top, t.scroll_bottom);
    csi(&mut t, &[], 'u');
    assert_eq!((t.cursor.row, t.cursor.col), (3, 6));
    assert_eq!(t.attrs, attrs);
    assert_eq!((t.scroll_top, t.scroll_bottom), (top, bottom));
}

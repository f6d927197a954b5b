use cmux_win::terminal::buffer::{Cell, ScreenBuffer};

fn text_of(b: &ScreenBuffer, row: u16) -> String {
    let mut s = String::new();
    for c in &b.lines[row as usize] {
        s.push_str(&c.char);
    }
    s
}

#[test]
fn default_cell_is_blank() {
    let c = Cell::default();
    assert_eq!(c.char, " ");
    assert_eq!((c.fg, c.bg, c.flags), (0, 0, 0));
}

#[test]
fn new_buffer_has_shape_and_limit() {
    let b = ScreenBuffer::new(4, 3);
    assert_eq!(b.lines.len(), 3);
    assert!(b.lines.iter().all(|l| l.len() == 4));
    assert!(b.scrollback.is_empty());
    assert_eq!(b.max_scrollback, 10000);
    assert_eq!((b.cols, b.rows), (4, 3));
    assert_eq!(text_of(&b, 0), "    ");
}

#[test]
fn cell_read_after_write() {
    let mut b = ScreenBuffer::new(4, 3);
    if let Some(c) = b.cell_mut(1, 2) {
        c.char = "x".to_string();
        c.fg = 3;
    }
    let c = b.cell(1, 2).unwrap();
    assert_eq!(c.char, "x");
    assert_eq!(c.fg, 3);
    assert_eq!(b.cell(1, 1).unwrap().char, " ");
    assert!(b.cell(3, 0).is_none());
    assert!(b.cell(0, 4).is_none());
    assert!(b.cell_mut(5, 5).is_none());
}

#[test]
fn resize_pads_and_cuts() {
    let mut b = ScreenBuffer::new(3, 2);
    b.cell_mut(0, 2).unwrap().char = "z".to_string();
    b.resize(5, 4);
    assert_eq!(b.lines.len(), 4);
    assert!(b.lines.iter().all(|l| l.len() == 5));
    assert_eq!(text_of(&b, 0), "  z  ");
    b.resize(2, 1);
    assert_eq!(b.lines.len(), 1);
    assert_eq!(text_of(&b, 0), "  ");
    assert_eq!((b.cols, b.rows), (2, 1));
}

#[test]
fn resize_to_same_size_keeps_content() {
    let mut b = ScreenBuffer::new(3, 2);
    b.cell_mut(1, 1).unwrap().char = "q".to_string();
    b.resize(3, 2);
    assert_eq!(text_of(&b, 1), " q ");
}

#[test]
fn scroll_up_moves_top_line_to_scrollback() {
    let mut b = ScreenBuffer::new(2, 2);
    b.cell_mut(0, 0).unwrap().char = "a".to_string();
    b.cell_mut(1, 0).unwrap().char = "b".to_string();
    b.scroll_up();
    assert_eq!(b.scrollback.len(), 1);
    assert_eq!(b.scrollback[0][0].char, "a");
    assert_eq!(text_of(&b, 0), "b ");
    assert_eq!(text_of(&b, 1), "  ");
    assert_eq!(b.lines.len(), 2);
}

#[test]
fn scroll_up_drops_oldest_beyond_limit() {
    let mut b = ScreenBuffer::new(1, 1);
    b.max_scrollback = 2;
    for ch in ["1", "2", "3"] {
        b.cell_mut(0, 0).unwrap().char = ch.to_string();
        b.scroll_up();
    }
    assert_eq!(b.scrollback.len(), 2);
    assert_eq!(b.scrollback[0][0].char, "2");
    assert_eq!(b.scrollback[1][0].char, "3");
}

#[test]
fn clear_empties_every_cell() {
    let mut b = ScreenBuffer::new(3, 2);
    b.cell_mut(0, 1).unwrap().fg = 9;
    b.cell_mut(1, 2).unwrap().char = "k".to_string();
    b.clear();
    assert!(b.lines.iter().flatten().all(|c| c.char == " " && c.fg == 0 && c.bg == 0 && c.flags == 0));
    assert_eq!(b.lines.len(), 2);
}

#[test]
fn clear_to_eol_clears_from_column() {
    let mut b = ScreenBuffer::new(4, 2);
    for col in 0..4 {
        b.cell_mut(0, col).unwrap().char = "x".to_string();
    }
    b.clear_to_eol(0, 2);
    assert_eq!(text_of(&b, 0), "xx  ");
    b.clear_to_eol(7, 0);
    assert_eq!(text_of(&b, 0), "xx  ");
    b.clear_to_eol(0, 9);
    assert_eq!(text_of(&b, 0), "xx  ");
}

#[test]
fn grow_then_shrink_restores() {
    let mut b = ScreenBuffer::new(3, 2);
    b.cell_mut(1, 2).unwrap().char = "e".to_string();
    b.cell_mut(0, 0).unwrap().fg = 4;
    b.resize(6, 5);
    assert_eq!(text_of(&b, 1), "  e   ");
    b.resize(3, 2);
    assert_eq!(b.lines.len(), 2);
    assert_eq!(text_of(&b, 1), "  e");
    assert_eq!(b.cell(0, 0).unwrap().fg, 4);
}
